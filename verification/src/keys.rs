use vstd::prelude::*;

use crate::app::{App, clamp_index, event_says, status_applied, visible_history};
use crate::chars::{chars_of, string_of};
use crate::status::{StatusEvent, StatusLevel};
use crate::templates::{Notice, SearchTemplates, clamped, deleted_message, same_lists, shown_len};
use crate::forms::{AppMode, MainTab, SearchTemplateKind};
use crate::screen::{tab_index, tab_titles_text};
use crate::status::{full_text_spec, local_offset_range, time_text, timestamp_pattern};
use crate::downloads::{
    DownloadHistoryEntry, DownloadKey, InterruptedDownloadSession, kept_entries, pause_record,
    selection_after_trim, upserted, DOWNLOAD_HISTORY_LIMIT,
};
use crate::active::{session_key, sessions_from_active, tracker_position};
use crate::downloads::DownloadTracker;
use crate::status::{filter_admits, StatusHistoryFilter};

verus! {

/// A key as the screens read it.
#[derive(Clone, Copy, Debug, PartialEq, Eq, Structural)]
pub enum KeyCode {
    Char(char),
    Esc,
    Enter,
    Backspace,
    Up,
    Down,
    Left,
    Right,
    Tab,
    BackTab,
    Other,
}

/// A key press: the key, and whether Shift or Control was held.
#[derive(Clone, Copy, Debug, PartialEq, Eq, Structural)]
pub struct KeyPress {
    pub code: KeyCode,
    pub shift: bool,
    pub control: bool,
}

/// What a key asks of the model detail window, whose model the caller holds.
#[derive(Clone, Copy, Debug, PartialEq, Eq, Structural)]
pub enum ModelDetailAction {
    Close,
    ToggleBookmark,
    Download,
    PreviousVersion,
    NextVersion,
    PreviousFile,
    NextFile,
}

/// What a key does while a window is open over the tabs.
#[derive(Clone, Copy, Debug, PartialEq, Eq, Structural)]
pub enum ModalAction {
    /// The key does nothing, but the window keeps it from the tabs.
    Ignore,
    CloseStatus,
    CloseStatusHistory,
    FilterHistory(StatusHistoryFilter),
    HistoryNext,
    HistoryPrevious,
    HistoryFirst,
    HistoryLast,
    CopyHistoryEntry,
    CloseHelp,
    ClosePrompt,
    ScrollPromptDown,
    ScrollPromptUp,
    ModelDetail(ModelDetailAction),
    ConfirmLikeRemove,
    CancelLikeRemove,
    CancelTemplateName,
    SaveTemplateName,
    PopTemplateName,
    PushTemplateName(char),
    CloseTemplates,
    NextTemplate,
    PreviousTemplate,
    LoadTemplate,
    BeginTemplateSave,
    DeleteTemplate,
    ResumeSessions,
    DeleteSessions,
    DeclineResume,
    ExitKeepingDownloads,
    ExitCancellingDownloads,
    DeclineExit,
}

/// The key is one of the given characters.
pub open spec fn is_char(code: KeyCode, a: char) -> bool {
    code == KeyCode::Char(a)
}

/// Keys of the status window.
pub open spec fn status_window_action(code: KeyCode) -> ModalAction {
    if is_char(code, 'm') || code == KeyCode::Esc || code == KeyCode::Enter {
        ModalAction::CloseStatus
    } else {
        ModalAction::Ignore
    }
}

/// Keys of the status history window.
pub open spec fn history_window_action(code: KeyCode) -> ModalAction {
    if is_char(code, 'M') || code == KeyCode::Esc || code == KeyCode::Enter {
        ModalAction::CloseStatusHistory
    } else if is_char(code, '0') {
        ModalAction::FilterHistory(StatusHistoryFilter::All)
    } else if is_char(code, '1') {
        ModalAction::FilterHistory(StatusHistoryFilter::Info)
    } else if is_char(code, '2') {
        ModalAction::FilterHistory(StatusHistoryFilter::Warn)
    } else if is_char(code, '3') {
        ModalAction::FilterHistory(StatusHistoryFilter::Debug)
    } else if is_char(code, '4') {
        ModalAction::FilterHistory(StatusHistoryFilter::Error)
    } else if is_char(code, 'j') || code == KeyCode::Down {
        ModalAction::HistoryNext
    } else if is_char(code, 'k') || code == KeyCode::Up {
        ModalAction::HistoryPrevious
    } else if is_char(code, 'g') {
        ModalAction::HistoryFirst
    } else if is_char(code, 'G') {
        ModalAction::HistoryLast
    } else if is_char(code, 'y') {
        ModalAction::CopyHistoryEntry
    } else {
        ModalAction::Ignore
    }
}

/// Keys of the help window.
pub open spec fn help_window_action(code: KeyCode) -> ModalAction {
    if is_char(code, '?') || code == KeyCode::Esc || code == KeyCode::Enter {
        ModalAction::CloseHelp
    } else {
        ModalAction::Ignore
    }
}

/// Keys of the image prompt window.
pub open spec fn prompt_window_action(code: KeyCode) -> ModalAction {
    if is_char(code, 'm') || code == KeyCode::Esc || code == KeyCode::Enter {
        ModalAction::ClosePrompt
    } else if is_char(code, 'j') || code == KeyCode::Down {
        ModalAction::ScrollPromptDown
    } else if is_char(code, 'k') || code == KeyCode::Up {
        ModalAction::ScrollPromptUp
    } else {
        ModalAction::Ignore
    }
}

/// Keys of the model detail window.
pub open spec fn detail_window_action(key: KeyPress) -> ModalAction {
    let code = key.code;
    if code == KeyCode::Esc || code == KeyCode::Enter {
        ModalAction::ModelDetail(ModelDetailAction::Close)
    } else if is_char(code, 'b') {
        ModalAction::ModelDetail(ModelDetailAction::ToggleBookmark)
    } else if is_char(code, 'd') {
        ModalAction::ModelDetail(ModelDetailAction::Download)
    } else if code == KeyCode::Left || is_char(code, 'h') || is_char(code, '[') {
        ModalAction::ModelDetail(ModelDetailAction::PreviousVersion)
    } else if code == KeyCode::Right || is_char(code, 'l') || is_char(code, ']') {
        ModalAction::ModelDetail(ModelDetailAction::NextVersion)
    } else if is_char(code, 'K') || (code == KeyCode::Up && key.shift) {
        ModalAction::ModelDetail(ModelDetailAction::PreviousFile)
    } else if is_char(code, 'J') || (code == KeyCode::Down && key.shift) {
        ModalAction::ModelDetail(ModelDetailAction::NextFile)
    } else {
        ModalAction::Ignore
    }
}

/// Keys of the remove-liked confirmation.
pub open spec fn like_confirm_action(code: KeyCode) -> ModalAction {
    if is_char(code, 'y') || is_char(code, 'Y') {
        ModalAction::ConfirmLikeRemove
    } else if is_char(code, 'n') || is_char(code, 'N') || code == KeyCode::Esc {
        ModalAction::CancelLikeRemove
    } else {
        ModalAction::Ignore
    }
}

/// Keys of the template window, while a name is typed and otherwise.
pub open spec fn template_window_action(code: KeyCode, editing: bool) -> ModalAction {
    if editing {
        match code {
            KeyCode::Esc => ModalAction::CancelTemplateName,
            KeyCode::Enter => ModalAction::SaveTemplateName,
            KeyCode::Backspace => ModalAction::PopTemplateName,
            KeyCode::Char(c) => ModalAction::PushTemplateName(c),
            _ => ModalAction::Ignore,
        }
    } else if code == KeyCode::Esc || is_char(code, 'T') {
        ModalAction::CloseTemplates
    } else if code == KeyCode::Down || is_char(code, 'j') {
        ModalAction::NextTemplate
    } else if code == KeyCode::Up || is_char(code, 'k') {
        ModalAction::PreviousTemplate
    } else if code == KeyCode::Enter || is_char(code, 'l') {
        ModalAction::LoadTemplate
    } else if is_char(code, 's') {
        ModalAction::BeginTemplateSave
    } else if is_char(code, 'd') {
        ModalAction::DeleteTemplate
    } else {
        ModalAction::Ignore
    }
}

/// Keys of the resume prompt for interrupted downloads.
pub open spec fn resume_prompt_action(code: KeyCode) -> ModalAction {
    if is_char(code, 'y') || is_char(code, 'Y') {
        ModalAction::ResumeSessions
    } else if is_char(code, 'd') || is_char(code, 'D') {
        ModalAction::DeleteSessions
    } else if is_char(code, 'n') || is_char(code, 'N') || code == KeyCode::Esc {
        ModalAction::DeclineResume
    } else {
        ModalAction::Ignore
    }
}

/// Keys of the exit confirmation.
pub open spec fn exit_prompt_action(code: KeyCode) -> ModalAction {
    if is_char(code, 'y') || is_char(code, 'Y') {
        ModalAction::ExitKeepingDownloads
    } else if is_char(code, 'd') || is_char(code, 'D') {
        ModalAction::ExitCancellingDownloads
    } else if is_char(code, 'n') || is_char(code, 'N') || code == KeyCode::Esc {
        ModalAction::DeclineExit
    } else {
        ModalAction::Ignore
    }
}

/// What a key does when windows are open: the first open one of the status,
/// status history, help, image prompt, model detail, remove-liked, template,
/// resume and exit windows takes it. None when no such window is open.
pub open spec fn modal_action(app: App, templates_open: bool, templates_editing: bool, key: KeyPress) -> Option<ModalAction> {
    if app.show_status_modal {
        Some(status_window_action(key.code))
    } else if app.show_status_history_modal {
        Some(history_window_action(key.code))
    } else if app.show_help_modal {
        Some(help_window_action(key.code))
    } else if app.show_image_prompt_modal {
        Some(prompt_window_action(key.code))
    } else if app.show_image_model_detail_modal {
        Some(detail_window_action(key))
    } else if app.show_like_confirm_modal {
        Some(like_confirm_action(key.code))
    } else if templates_open {
        Some(template_window_action(key.code, templates_editing))
    } else if app.show_resume_download_modal {
        Some(resume_prompt_action(key.code))
    } else if app.show_exit_confirm_modal {
        Some(exit_prompt_action(key.code))
    } else {
        None
    }
}

fn char_is(code: KeyCode, a: char) -> (b: bool)
    ensures
        b == is_char(code, a),
{
    match code {
        KeyCode::Char(c) => c == a,
        _ => false,
    }
}

fn status_window_key(code: KeyCode) -> (r: ModalAction)
    ensures
        r == status_window_action(code),
{
    if char_is(code, 'm') || code == KeyCode::Esc || code == KeyCode::Enter {
        ModalAction::CloseStatus
    } else {
        ModalAction::Ignore
    }
}

fn history_window_key(code: KeyCode) -> (r: ModalAction)
    ensures
        r == history_window_action(code),
{
    if char_is(code, 'M') || code == KeyCode::Esc || code == KeyCode::Enter {
        ModalAction::CloseStatusHistory
    } else if char_is(code, '0') {
        ModalAction::FilterHistory(StatusHistoryFilter::All)
    } else if char_is(code, '1') {
        ModalAction::FilterHistory(StatusHistoryFilter::Info)
    } else if char_is(code, '2') {
        ModalAction::FilterHistory(StatusHistoryFilter::Warn)
    } else if char_is(code, '3') {
        ModalAction::FilterHistory(StatusHistoryFilter::Debug)
    } else if char_is(code, '4') {
        ModalAction::FilterHistory(StatusHistoryFilter::Error)
    } else if char_is(code, 'j') || code == KeyCode::Down {
        ModalAction::HistoryNext
    } else if char_is(code, 'k') || code == KeyCode::Up {
        ModalAction::HistoryPrevious
    } else if char_is(code, 'g') {
        ModalAction::HistoryFirst
    } else if char_is(code, 'G') {
        ModalAction::HistoryLast
    } else if char_is(code, 'y') {
        ModalAction::CopyHistoryEntry
    } else {
        ModalAction::Ignore
    }
}

fn help_window_key(code: KeyCode) -> (r: ModalAction)
    ensures
        r == help_window_action(code),
{
    if char_is(code, '?') || code == KeyCode::Esc || code == KeyCode::Enter {
        ModalAction::CloseHelp
    } else {
        ModalAction::Ignore
    }
}

fn prompt_window_key(code: KeyCode) -> (r: ModalAction)
    ensures
        r == prompt_window_action(code),
{
    if char_is(code, 'm') || code == KeyCode::Esc || code == KeyCode::Enter {
        ModalAction::ClosePrompt
    } else if char_is(code, 'j') || code == KeyCode::Down {
        ModalAction::ScrollPromptDown
    } else if char_is(code, 'k') || code == KeyCode::Up {
        ModalAction::ScrollPromptUp
    } else {
        ModalAction::Ignore
    }
}

fn detail_window_key(key: KeyPress) -> (r: ModalAction)
    ensures
        r == detail_window_action(key),
{
    let code = key.code;
    if code == KeyCode::Esc || code == KeyCode::Enter {
        ModalAction::ModelDetail(ModelDetailAction::Close)
    } else if char_is(code, 'b') {
        ModalAction::ModelDetail(ModelDetailAction::ToggleBookmark)
    } else if char_is(code, 'd') {
        ModalAction::ModelDetail(ModelDetailAction::Download)
    } else if code == KeyCode::Left || char_is(code, 'h') || char_is(code, '[') {
        ModalAction::ModelDetail(ModelDetailAction::PreviousVersion)
    } else if code == KeyCode::Right || char_is(code, 'l') || char_is(code, ']') {
        ModalAction::ModelDetail(ModelDetailAction::NextVersion)
    } else if char_is(code, 'K') || (code == KeyCode::Up && key.shift) {
        ModalAction::ModelDetail(ModelDetailAction::PreviousFile)
    } else if char_is(code, 'J') || (code == KeyCode::Down && key.shift) {
        ModalAction::ModelDetail(ModelDetailAction::NextFile)
    } else {
        ModalAction::Ignore
    }
}

fn like_confirm_key(code: KeyCode) -> (r: ModalAction)
    ensures
        r == like_confirm_action(code),
{
    if char_is(code, 'y') || char_is(code, 'Y') {
        ModalAction::ConfirmLikeRemove
    } else if char_is(code, 'n') || char_is(code, 'N') || code == KeyCode::Esc {
        ModalAction::CancelLikeRemove
    } else {
        ModalAction::Ignore
    }
}

fn template_window_key(code: KeyCode, editing: bool) -> (r: ModalAction)
    ensures
        r == template_window_action(code, editing),
{
    if editing {
        match code {
            KeyCode::Esc => ModalAction::CancelTemplateName,
            KeyCode::Enter => ModalAction::SaveTemplateName,
            KeyCode::Backspace => ModalAction::PopTemplateName,
            KeyCode::Char(c) => ModalAction::PushTemplateName(c),
            _ => ModalAction::Ignore,
        }
    } else if code == KeyCode::Esc || char_is(code, 'T') {
        ModalAction::CloseTemplates
    } else if code == KeyCode::Down || char_is(code, 'j') {
        ModalAction::NextTemplate
    } else if code == KeyCode::Up || char_is(code, 'k') {
        ModalAction::PreviousTemplate
    } else if code == KeyCode::Enter || char_is(code, 'l') {
        ModalAction::LoadTemplate
    } else if char_is(code, 's') {
        ModalAction::BeginTemplateSave
    } else if char_is(code, 'd') {
        ModalAction::DeleteTemplate
    } else {
        ModalAction::Ignore
    }
}

fn resume_prompt_key(code: KeyCode) -> (r: ModalAction)
    ensures
        r == resume_prompt_action(code),
{
    if char_is(code, 'y') || char_is(code, 'Y') {
        ModalAction::ResumeSessions
    } else if char_is(code, 'd') || char_is(code, 'D') {
        ModalAction::DeleteSessions
    } else if char_is(code, 'n') || char_is(code, 'N') || code == KeyCode::Esc {
        ModalAction::DeclineResume
    } else {
        ModalAction::Ignore
    }
}

fn exit_prompt_key(code: KeyCode) -> (r: ModalAction)
    ensures
        r == exit_prompt_action(code),
{
    if char_is(code, 'y') || char_is(code, 'Y') {
        ModalAction::ExitKeepingDownloads
    } else if char_is(code, 'd') || char_is(code, 'D') {
        ModalAction::ExitCancellingDownloads
    } else if char_is(code, 'n') || char_is(code, 'N') || code == KeyCode::Esc {
        ModalAction::DeclineExit
    } else {
        ModalAction::Ignore
    }
}

impl App {
    /// What a key does while windows are open over the tabs, none when no
    /// window is open; the caller says whether the template window is open and
    /// a template name is being typed.
    pub fn modal_key_action(&self, templates_open: bool, templates_editing: bool, key: KeyPress) -> (r: Option<ModalAction>)
        ensures
            r == modal_action(*self, templates_open, templates_editing, key),
    {
        if self.show_status_modal {
            Some(status_window_key(key.code))
        } else if self.show_status_history_modal {
            Some(history_window_key(key.code))
        } else if self.show_help_modal {
            Some(help_window_key(key.code))
        } else if self.show_image_prompt_modal {
            Some(prompt_window_key(key.code))
        } else if self.show_image_model_detail_modal {
            Some(detail_window_key(key))
        } else if self.show_like_confirm_modal {
            Some(like_confirm_key(key.code))
        } else if templates_open {
            Some(template_window_key(key.code, templates_editing))
        } else if self.show_resume_download_modal {
            Some(resume_prompt_key(key.code))
        } else if self.show_exit_confirm_modal {
            Some(exit_prompt_key(key.code))
        } else {
            None
        }
    }
}


/// Whether the key loop goes on or ends.
#[derive(Clone, Copy, Debug, PartialEq, Eq, Structural)]
pub enum ModalKeyOutcome {
    Consumed,
    Break,
}

/// Work a key in a window leaves to the caller, who holds the models, the
/// search forms, the worker and the disk.
pub enum ModalWork {
    Nothing,
    /// Copy this text to the clipboard, then report how that went.
    CopyStatusMessage(String),
    /// Act on the model shown in the detail window.
    ModelDetail(ModelDetailAction),
    /// Remove the liked model waiting for confirmation.
    ConfirmLikeRemove,
    /// Forget the liked model waiting for confirmation.
    CancelLikeRemove,
    /// Save the current search under the typed name.
    SaveTemplate,
    /// Restore the search of the template at this index of the kind shown,
    /// then run it.
    LoadTemplate(usize),
    /// Write the templates to disk.
    PersistTemplates,
    /// Resume these downloads, then save the (now empty) session list.
    ResumeSessions(Vec<InterruptedDownloadSession>),
    /// Delete the partial files of these sessions, then save the history and
    /// the (now empty) session list.
    DeleteSessionFiles(Vec<InterruptedDownloadSession>),
    /// Pause these downloads, save the session list, and quit.
    PauseAndQuit(Vec<DownloadKey>),
    /// Cancel these downloads, delete these files, save the session list,
    /// and quit.
    CancelAndQuit(Vec<DownloadKey>, Vec<String>),
}


/// What a key does to the status, help, prompt, detail and remove-liked
/// windows, and the work it leaves.
pub open spec fn screen_effect(a: App, b: App, action: ModalAction, work: ModalWork) -> bool {
    match action {
        ModalAction::Ignore => b == a && work is Nothing,
        ModalAction::CloseStatus => b == (App { show_status_modal: false, ..a }) && work is Nothing,
        ModalAction::CloseStatusHistory => b == (App { show_status_history_modal: false, ..a })
            && work is Nothing,
        ModalAction::FilterHistory(f) => b == (App {
            status_history_filter: f,
            selected_status_history_index: 0,
            ..a
        }) && work is Nothing,
        ModalAction::HistoryNext => {
            let len = visible_history(a.status_history@, a.status_history_filter).len();
            &&& b == (App {
                selected_status_history_index: if a.selected_status_history_index + 1 < len {
                    (a.selected_status_history_index + 1) as usize
                } else {
                    a.selected_status_history_index
                },
                ..a
            })
            &&& work is Nothing
        },
        ModalAction::HistoryPrevious => b == (App {
            selected_status_history_index: if a.selected_status_history_index > 0 {
                (a.selected_status_history_index - 1) as usize
            } else {
                0
            },
            ..a
        }) && work is Nothing,
        ModalAction::HistoryFirst => b == (App { selected_status_history_index: 0, ..a })
            && work is Nothing,
        ModalAction::HistoryLast => {
            let len = visible_history(a.status_history@, a.status_history_filter).len();
            &&& b == (App {
                selected_status_history_index: if len > 0 {
                    (len - 1) as usize
                } else {
                    a.selected_status_history_index
                },
                ..a
            })
            &&& work is Nothing
        },
        ModalAction::CopyHistoryEntry => {
            let v = visible_history(a.status_history@, a.status_history_filter);
            &&& b == a
            &&& if a.selected_status_history_index < v.len() {
                work matches ModalWork::CopyStatusMessage(text) && {
                    let e = v[a.selected_status_history_index as int];
                    match e.recorded_unix {
                        Some(u) => exists|o: int|
                            local_offset_range(o) && text@ == full_text_spec(
                                e,
                                #[trigger] time_text(u as int, o, timestamp_pattern()),
                            ),
                        None => text@ == full_text_spec(e, Seq::empty()),
                    }
                }
            } else {
                work is Nothing
            }
        },
        ModalAction::CloseHelp => b == (App { show_help_modal: false, ..a }) && work is Nothing,
        ModalAction::ClosePrompt => b == (App { show_image_prompt_modal: false, ..a })
            && work is Nothing,
        ModalAction::ScrollPromptDown => b == (App {
            image_prompt_scroll: if a.image_prompt_scroll < 0xffff {
                (a.image_prompt_scroll + 1) as u16
            } else {
                a.image_prompt_scroll
            },
            ..a
        }) && work is Nothing,
        ModalAction::ScrollPromptUp => b == (App {
            image_prompt_scroll: if a.image_prompt_scroll > 0 {
                (a.image_prompt_scroll - 1) as u16
            } else {
                0
            },
            ..a
        }) && work is Nothing,
        ModalAction::ModelDetail(d) => {
            &&& b == if d == ModelDetailAction::Close {
                App { show_image_model_detail_modal: false, ..a }
            } else {
                a
            }
            &&& work == ModalWork::ModelDetail(d)
        },
        ModalAction::ConfirmLikeRemove => b == (App { show_like_confirm_modal: false, ..a })
            && work is ConfirmLikeRemove,
        ModalAction::CancelLikeRemove => b == (App { show_like_confirm_modal: false, ..a })
            && work is CancelLikeRemove,
        _ => false,
    }
}


impl App {
    #[verifier::rlimit(60)]
    fn perform_history_action(&mut self, action: ModalAction) -> (work: ModalWork)
        requires
            history_action(action),
        ensures
            screen_effect(*old(self), *final(self), action, work),
    {
        match action {
            ModalAction::CloseStatusHistory => {
                self.close_status_history_modal();
                ModalWork::Nothing
            },
            ModalAction::FilterHistory(f) => {
                self.status_history_filter = f;
                self.selected_status_history_index = 0;
                ModalWork::Nothing
            },
            ModalAction::HistoryNext => {
                self.select_next_status_history();
                ModalWork::Nothing
            },
            ModalAction::HistoryPrevious => {
                self.select_previous_status_history();
                ModalWork::Nothing
            },
            ModalAction::HistoryFirst => {
                self.select_first_status_history();
                ModalWork::Nothing
            },
            ModalAction::HistoryLast => {
                self.select_last_status_history();
                ModalWork::Nothing
            },
            _ => {
                match self.selected_status_history_entry() {
                    Some(entry) => ModalWork::CopyStatusMessage(entry.full_text()),
                    None => ModalWork::Nothing,
                }
            },
        }
    }

    fn perform_window_action(&mut self, action: ModalAction) -> (work: ModalWork)
        requires
            screen_action(action),
            !history_action(action),
        ensures
            screen_effect(*old(self), *final(self), action, work),
    {
        match action {
            ModalAction::CloseStatus => {
                self.show_status_modal = false;
                ModalWork::Nothing
            },
            ModalAction::CloseHelp => {
                self.show_help_modal = false;
                ModalWork::Nothing
            },
            ModalAction::ClosePrompt => {
                self.show_image_prompt_modal = false;
                ModalWork::Nothing
            },
            ModalAction::ScrollPromptDown => {
                if self.image_prompt_scroll < 0xffff {
                    self.image_prompt_scroll = self.image_prompt_scroll + 1;
                }
                ModalWork::Nothing
            },
            ModalAction::ScrollPromptUp => {
                if self.image_prompt_scroll > 0 {
                    self.image_prompt_scroll = self.image_prompt_scroll - 1;
                }
                ModalWork::Nothing
            },
            ModalAction::ModelDetail(d) => {
                if d == ModelDetailAction::Close {
                    self.show_image_model_detail_modal = false;
                }
                ModalWork::ModelDetail(d)
            },
            ModalAction::ConfirmLikeRemove => {
                self.show_like_confirm_modal = false;
                ModalWork::ConfirmLikeRemove
            },
            ModalAction::CancelLikeRemove => {
                self.show_like_confirm_modal = false;
                ModalWork::CancelLikeRemove
            },
            _ => ModalWork::Nothing,
        }
    }
}

/// The actions on the status history window.
pub open spec fn history_action(action: ModalAction) -> bool {
    match action {
        ModalAction::CloseStatusHistory | ModalAction::FilterHistory(_) | ModalAction::HistoryNext
        | ModalAction::HistoryPrevious | ModalAction::HistoryFirst | ModalAction::HistoryLast
        | ModalAction::CopyHistoryEntry => true,
        _ => false,
    }
}

/// The actions on the status, help, prompt, detail and remove-liked windows.
pub open spec fn screen_action(action: ModalAction) -> bool {
    match action {
        ModalAction::Ignore | ModalAction::CloseStatus | ModalAction::CloseStatusHistory
        | ModalAction::FilterHistory(_) | ModalAction::HistoryNext | ModalAction::HistoryPrevious
        | ModalAction::HistoryFirst | ModalAction::HistoryLast | ModalAction::CopyHistoryEntry
        | ModalAction::CloseHelp | ModalAction::ClosePrompt | ModalAction::ScrollPromptDown
        | ModalAction::ScrollPromptUp | ModalAction::ModelDetail(_) | ModalAction::ConfirmLikeRemove
        | ModalAction::CancelLikeRemove => true,
        _ => false,
    }
}


/// The status line shows a notice: a warning for a warning notice, else an
/// informational message.
pub open spec fn notice_shown(a: App, b: App, level: StatusLevel, text: Seq<char>) -> bool {
    exists|e: StatusEvent|
        event_says(
            e,
            if level == StatusLevel::Warn {
                StatusLevel::Warn
            } else {
                StatusLevel::Info
            },
            text,
            None,
            false,
        ) && #[trigger] status_applied(a, b, e)
}

impl App {
    /// Shows a notice in the status line: a warning as a warning, anything
    /// else as an informational message.
    pub fn apply_notice(&mut self, n: &Notice)
        ensures
            notice_shown(*old(self), *final(self), n.level, n.text@),
    {
        if n.level == StatusLevel::Warn {
            self.set_warn(n.text.as_str());
        } else {
            self.set_status(n.text.as_str());
        }
    }
}

/// The template window is the same but for its selection.
pub open spec fn same_window<M, I>(a: SearchTemplates<M, I>, b: SearchTemplates<M, I>) -> bool {
    &&& same_lists(a, b)
    &&& a.search_template_kind == b.search_template_kind
    &&& a.show_search_template_modal == b.show_search_template_modal
    &&& a.search_template_name_editing == b.search_template_name_editing
    &&& a.search_template_name_draft == b.search_template_name_draft
}

/// The template window closed, its typed name cleared, all else kept.
pub open spec fn window_closed<M, I>(a: SearchTemplates<M, I>, b: SearchTemplates<M, I>) -> bool {
    &&& same_lists(a, b)
    &&& b.search_template_kind == a.search_template_kind
    &&& b.selected_search_template_index == a.selected_search_template_index
    &&& !b.show_search_template_modal
    &&& !b.search_template_name_editing
    &&& b.search_template_name_draft@.len() == 0
}

/// The typed name replaced, all else kept.
pub open spec fn name_typed<M, I>(a: SearchTemplates<M, I>, b: SearchTemplates<M, I>, name: Seq<char>, editing: bool) -> bool {
    &&& same_lists(a, b)
    &&& b.search_template_kind == a.search_template_kind
    &&& b.selected_search_template_index == a.selected_search_template_index
    &&& b.show_search_template_modal == a.show_search_template_modal
    &&& b.search_template_name_editing == editing
    &&& b.search_template_name_draft@ == name
}

/// What a key does to the template window, and the work it leaves.
pub open spec fn template_effect<M, I>(
    a: App,
    b: App,
    ta: SearchTemplates<M, I>,
    tb: SearchTemplates<M, I>,
    action: ModalAction,
    work: ModalWork,
) -> bool {
    match action {
        ModalAction::CancelTemplateName => {
            &&& name_typed(ta, tb, seq![], false)
            &&& notice_shown(a, b, StatusLevel::Info, "Template save cancelled"@)
            &&& work is Nothing
        },
        ModalAction::SaveTemplateName => b == a && tb == ta && work is SaveTemplate,
        ModalAction::PopTemplateName => {
            let d = ta.search_template_name_draft@;
            &&& b == a
            &&& name_typed(
                ta,
                tb,
                if d.len() > 0 {
                    d.drop_last()
                } else {
                    d
                },
                ta.search_template_name_editing,
            )
            &&& work is Nothing
        },
        ModalAction::PushTemplateName(c) => {
            &&& b == a
            &&& name_typed(
                ta,
                tb,
                ta.search_template_name_draft@.push(c),
                ta.search_template_name_editing,
            )
            &&& work is Nothing
        },
        ModalAction::CloseTemplates => b == a && window_closed(ta, tb) && work is Nothing,
        ModalAction::NextTemplate => {
            &&& b == a
            &&& same_window(ta, tb)
            &&& tb.selected_search_template_index == if ta.selected_search_template_index + 1
                < shown_len(ta) {
                ta.selected_search_template_index + 1
            } else {
                ta.selected_search_template_index as int
            }
            &&& work is Nothing
        },
        ModalAction::PreviousTemplate => {
            &&& b == a
            &&& same_window(ta, tb)
            &&& tb.selected_search_template_index == if ta.selected_search_template_index > 0 {
                ta.selected_search_template_index - 1
            } else {
                0
            }
            &&& work is Nothing
        },
        ModalAction::LoadTemplate => if ta.selected_search_template_index < shown_len(ta) {
            &&& b == a
            &&& window_closed(ta, tb)
            &&& work == ModalWork::LoadTemplate(ta.selected_search_template_index)
        } else {
            &&& tb == ta
            &&& notice_shown(
                a,
                b,
                StatusLevel::Warn,
                match ta.search_template_kind {
                    SearchTemplateKind::Model => "No model template selected."@,
                    SearchTemplateKind::Image => "No image template selected."@,
                },
            )
            &&& work is Nothing
        },
        ModalAction::BeginTemplateSave => {
            &&& name_typed(ta, tb, seq![], true)
            &&& notice_shown(a, b, StatusLevel::Info, "Type a template name and press Enter to save"@)
            &&& work is Nothing
        },
        ModalAction::DeleteTemplate => if shown_len(ta) == 0 {
            &&& tb == ta
            &&& notice_shown(a, b, StatusLevel::Warn, "No template selected."@)
            &&& work is Nothing
        } else {
            let i = ta.selected_search_template_index as int;
            &&& match ta.search_template_kind {
                SearchTemplateKind::Model => {
                    &&& tb.model_search_templates@ == ta.model_search_templates@.remove(i)
                    &&& tb.image_search_templates == ta.image_search_templates
                    &&& notice_shown(a, b, StatusLevel::Info, deleted_message(ta.model_search_templates@[i].name@))
                },
                SearchTemplateKind::Image => {
                    &&& tb.image_search_templates@ == ta.image_search_templates@.remove(i)
                    &&& tb.model_search_templates == ta.model_search_templates
                    &&& notice_shown(a, b, StatusLevel::Info, deleted_message(ta.image_search_templates@[i].name@))
                },
            }
            &&& tb.selected_search_template_index == clamped(i, shown_len(ta) - 1)
            &&& tb.search_template_kind == ta.search_template_kind
            &&& tb.show_search_template_modal == ta.show_search_template_modal
            &&& tb.search_template_name_editing == ta.search_template_name_editing
            &&& tb.search_template_name_draft == ta.search_template_name_draft
            &&& work is PersistTemplates
        },
        _ => false,
    }
}

/// The actions on the template window.
pub open spec fn template_action(action: ModalAction) -> bool {
    match action {
        ModalAction::CancelTemplateName | ModalAction::SaveTemplateName
        | ModalAction::PopTemplateName | ModalAction::PushTemplateName(_)
        | ModalAction::CloseTemplates | ModalAction::NextTemplate | ModalAction::PreviousTemplate
        | ModalAction::LoadTemplate | ModalAction::BeginTemplateSave
        | ModalAction::DeleteTemplate => true,
        _ => false,
    }
}

/// The template selection is on a template of the kind shown, unless there
/// is none.
pub open spec fn template_selection_ok<M, I>(t: SearchTemplates<M, I>) -> bool {
    shown_len(t) == 0 || t.selected_search_template_index < shown_len(t)
}

impl App {
    fn edit_template_name<M, I>(&mut self, templates: &mut SearchTemplates<M, I>, action: ModalAction) -> (work: ModalWork)
        requires
            action is CancelTemplateName || action is SaveTemplateName || action is PopTemplateName
                || action is PushTemplateName,
        ensures
            template_effect(*old(self), *final(self), *old(templates), *final(templates), action, work),
    {
        match action {
            ModalAction::CancelTemplateName => {
                templates.search_template_name_editing = false;
                templates.search_template_name_draft = String::new();
                self.set_status("Template save cancelled");
                ModalWork::Nothing
            },
            ModalAction::SaveTemplateName => ModalWork::SaveTemplate,
            ModalAction::PopTemplateName => {
                let mut cs = chars_of(templates.search_template_name_draft.as_str());
                cs.pop();
                templates.search_template_name_draft = string_of(cs.as_slice());
                ModalWork::Nothing
            },
            ModalAction::PushTemplateName(c) => {
                let mut cs = chars_of(templates.search_template_name_draft.as_str());
                cs.push(c);
                templates.search_template_name_draft = string_of(cs.as_slice());
                ModalWork::Nothing
            },
            _ => ModalWork::Nothing,
        }
    }

    fn browse_templates<M, I>(&mut self, templates: &mut SearchTemplates<M, I>, action: ModalAction) -> (work: ModalWork)
        requires
            template_action(action),
            !(action is CancelTemplateName || action is SaveTemplateName || action is PopTemplateName
                || action is PushTemplateName),
            template_selection_ok(*old(templates)),
        ensures
            template_effect(*old(self), *final(self), *old(templates), *final(templates), action, work),
    {
        match action {
            ModalAction::CloseTemplates => {
                templates.close_search_template_modal();
                ModalWork::Nothing
            },
            ModalAction::NextTemplate => {
                templates.select_next_search_template();
                ModalWork::Nothing
            },
            ModalAction::PreviousTemplate => {
                templates.select_previous_search_template();
                ModalWork::Nothing
            },
            ModalAction::LoadTemplate => {
                match templates.load_selected_search_template() {
                    Ok(i) => ModalWork::LoadTemplate(i),
                    Err(n) => {
                        self.apply_notice(&n);
                        ModalWork::Nothing
                    },
                }
            },
            ModalAction::BeginTemplateSave => {
                let n = templates.begin_search_template_save();
                assert(templates.search_template_name_draft@ =~= seq![]);
                self.apply_notice(&n);
                ModalWork::Nothing
            },
            _ => {
                let deleting = match templates.search_template_kind {
                    SearchTemplateKind::Model => templates.model_search_templates.len() > 0,
                    SearchTemplateKind::Image => templates.image_search_templates.len() > 0,
                };
                let n = templates.delete_selected_search_template();
                self.apply_notice(&n);
                if deleting {
                    ModalWork::PersistTemplates
                } else {
                    ModalWork::Nothing
                }
            },
        }
    }
}


/// The keys of the sessions whose download is still tracked, in order.
pub open spec fn tracked_session_keys(active: Seq<DownloadTracker>, ss: Seq<InterruptedDownloadSession>) -> Seq<DownloadKey>
    decreases ss.len(),
{
    if ss.len() == 0 {
        seq![]
    } else {
        let rest = tracked_session_keys(active, ss.drop_last());
        if tracker_position(active, session_key(ss.last())) is Some {
            rest.push(session_key(ss.last()))
        } else {
            rest
        }
    }
}

/// The history and its selection after the first `n` sessions are recorded
/// as pause records, one after another.
pub open spec fn pause_state(h: Seq<DownloadHistoryEntry>, idx: int, ss: Seq<InterruptedDownloadSession>, n: int) -> (Seq<DownloadHistoryEntry>, int)
    decreases n,
{
    if n <= 0 {
        (h, idx)
    } else {
        let (h1, i1) = pause_state(h, idx, ss, n - 1);
        let s = ss[n - 1];
        let h2 = upserted(h1, pause_record(s));
        (h2, selection_after_trim(i1, kept_entries(h1, s.model_id, s.version_id, true).len() + 1 > DOWNLOAD_HISTORY_LIMIT, h2.len() as int))
    }
}

/// The history and its selection after the entries of the first `n`
/// sessions' model versions are removed, one session after another.
pub open spec fn removal_state(h: Seq<DownloadHistoryEntry>, idx: int, ss: Seq<InterruptedDownloadSession>, n: int) -> (Seq<DownloadHistoryEntry>, int)
    decreases n,
{
    if n <= 0 {
        (h, idx)
    } else {
        let (h1, i1) = removal_state(h, idx, ss, n - 1);
        let s = ss[n - 1];
        let h2 = kept_entries(h1, s.model_id, s.version_id, false);
        (h2, if h1.len() - h2.len() > 0 { clamp_index(i1, h2.len() as int) } else { i1 })
    }
}

/// The partial files of sessions, in order, for those that have one.
pub open spec fn session_paths(ss: Seq<InterruptedDownloadSession>) -> Seq<Seq<char>>
    decreases ss.len(),
{
    if ss.len() == 0 {
        seq![]
    } else {
        let rest = session_paths(ss.drop_last());
        match ss.last().file_path {
            Some(p) => rest.push(p@),
            None => rest,
        }
    }
}

/// What a key does to the resume and exit prompts, and the work it leaves.
pub open spec fn download_prompt_effect(a: App, b: App, action: ModalAction, work: ModalWork) -> bool {
    match action {
        ModalAction::ResumeSessions => {
            &&& b == (App {
                interrupted_download_sessions: b.interrupted_download_sessions,
                show_resume_download_modal: false,
                status: b.status,
                ..a
            })
            &&& b.interrupted_download_sessions@.len() == 0
            &&& b.status@ == "Interrupted downloads resumed."@
            &&& work matches ModalWork::ResumeSessions(ss) && ss@ == a.interrupted_download_sessions@
        },
        ModalAction::DeleteSessions => {
            let ss = a.interrupted_download_sessions@;
            let after = removal_state(a.download_history@, a.selected_history_index as int, ss, ss.len() as int);
            &&& b == (App {
                download_history: b.download_history,
                selected_history_index: b.selected_history_index,
                interrupted_download_sessions: b.interrupted_download_sessions,
                show_resume_download_modal: false,
                status: b.status,
                ..a
            })
            &&& b.download_history@ == after.0
            &&& b.selected_history_index == after.1
            &&& b.interrupted_download_sessions@.len() == 0
            &&& b.status@ == "Interrupted downloads removed."@
            &&& work matches ModalWork::DeleteSessionFiles(files) && files@ == ss
        },
        ModalAction::DeclineResume => {
            &&& b == (App { show_resume_download_modal: false, status: b.status, ..a })
            &&& b.status@ == "Resume interrupted downloads cancelled."@
            &&& work is Nothing
        },
        ModalAction::ExitKeepingDownloads => {
            let ss = b.interrupted_download_sessions@;
            let after = pause_state(a.download_history@, a.selected_history_index as int, ss, ss.len() as int);
            &&& b == (App {
                download_history: b.download_history,
                selected_history_index: b.selected_history_index,
                interrupted_download_sessions: b.interrupted_download_sessions,
                show_exit_confirm_modal: false,
                ..a
            })
            &&& sessions_from_active(a, ss)
            &&& b.download_history@ == after.0
            &&& b.selected_history_index == after.1
            &&& work matches ModalWork::PauseAndQuit(keys) && keys@ == tracked_session_keys(a.active_downloads@, ss)
        },
        ModalAction::ExitCancellingDownloads => {
            &&& b == (App {
                download_history: b.download_history,
                selected_history_index: b.selected_history_index,
                interrupted_download_sessions: b.interrupted_download_sessions,
                show_exit_confirm_modal: false,
                ..a
            })
            &&& b.interrupted_download_sessions@.len() == 0
            &&& exists|ss: Seq<InterruptedDownloadSession>| #[trigger] sessions_from_active(a, ss) && {
                let after = removal_state(a.download_history@, a.selected_history_index as int, ss, ss.len() as int);
                &&& b.download_history@ == after.0
                &&& b.selected_history_index == after.1
                &&& work matches ModalWork::CancelAndQuit(keys, paths)
                    && keys@ == tracked_session_keys(a.active_downloads@, ss)
                    && paths@.map_values(|p: String| p@) == session_paths(ss)
            }
        },
        ModalAction::DeclineExit => b == (App { show_exit_confirm_modal: false, ..a }) && work is Nothing,
        _ => false,
    }
}

fn clone_sessions(v: &Vec<InterruptedDownloadSession>) -> (r: Vec<InterruptedDownloadSession>)
    ensures
        r@ == v@,
{
    let mut r: Vec<InterruptedDownloadSession> = Vec::new();
    let mut i: usize = 0;
    while i < v.len()
        invariant
            i <= v@.len(),
            r@ == v@.subrange(0, i as int),
        decreases v@.len() - i,
    {
        r.push(v[i].clone());
        i = i + 1;
        assert(r@ =~= v@.subrange(0, i as int));
    }
    assert(v@.subrange(0, v@.len() as int) =~= v@);
    r
}

impl App {
    fn remove_history_of_sessions(&mut self, ss: &Vec<InterruptedDownloadSession>)
        ensures
            ({
                let after = removal_state(old(self).download_history@, old(self).selected_history_index as int, ss@, ss@.len() as int);
                &&& final(self).download_history@ == after.0
                &&& final(self).selected_history_index == after.1
                &&& *final(self) == (App {
                    download_history: final(self).download_history,
                    selected_history_index: final(self).selected_history_index,
                    ..*old(self)
                })
            }),
    {
        let ghost a0 = *self;
        let mut i: usize = 0;
        while i < ss.len()
            invariant
                i <= ss@.len(),
                self.download_history@ == removal_state(a0.download_history@, a0.selected_history_index as int, ss@, i as int).0,
                self.selected_history_index == removal_state(a0.download_history@, a0.selected_history_index as int, ss@, i as int).1,
                *self == (App {
                    download_history: self.download_history,
                    selected_history_index: self.selected_history_index,
                    ..a0
                }),
            decreases ss@.len() - i,
        {
            self.remove_history_for_session(ss[i].model_id, ss[i].version_id);
            i = i + 1;
        }
    }

    fn resume_prompt_action(&mut self, action: ModalAction) -> (work: ModalWork)
        requires
            action is ResumeSessions || action is DeleteSessions || action is DeclineResume,
        ensures
            download_prompt_effect(*old(self), *final(self), action, work),
    {
        match action {
            ModalAction::ResumeSessions => {
                let sessions = clone_sessions(&self.interrupted_download_sessions);
                self.interrupted_download_sessions = Vec::new();
                self.show_resume_download_modal = false;
                self.status = "Interrupted downloads resumed.".to_owned();
                ModalWork::ResumeSessions(sessions)
            },
            ModalAction::DeleteSessions => {
                let sessions = clone_sessions(&self.interrupted_download_sessions);
                self.remove_history_of_sessions(&sessions);
                self.interrupted_download_sessions = Vec::new();
                self.show_resume_download_modal = false;
                self.status = "Interrupted downloads removed.".to_owned();
                ModalWork::DeleteSessionFiles(sessions)
            },
            _ => {
                self.show_resume_download_modal = false;
                self.status = "Resume interrupted downloads cancelled.".to_owned();
                ModalWork::Nothing
            },
        }
    }

    fn tracked_keys(&self, ss: &Vec<InterruptedDownloadSession>) -> (keys: Vec<DownloadKey>)
        ensures
            keys@ == tracked_session_keys(self.active_downloads@, ss@),
    {
        let mut keys: Vec<DownloadKey> = Vec::new();
        let mut i: usize = 0;
        while i < ss.len()
            invariant
                i <= ss@.len(),
                keys@ == tracked_session_keys(self.active_downloads@, ss@.subrange(0, i as int)),
            decreases ss@.len() - i,
        {
            proof {
                assert(ss@.subrange(0, i + 1).drop_last() =~= ss@.subrange(0, i as int));
            }
            if let Some(k) = self.active_download_key_for_session(&ss[i]) {
                keys.push(k);
            }
            i = i + 1;
        }
        assert(ss@.subrange(0, ss@.len() as int) =~= ss@);
        keys
    }

    fn file_paths(ss: &Vec<InterruptedDownloadSession>) -> (paths: Vec<String>)
        ensures
            paths@.map_values(|p: String| p@) == session_paths(ss@),
    {
        let mut paths: Vec<String> = Vec::new();
        let mut i: usize = 0;
        while i < ss.len()
            invariant
                i <= ss@.len(),
                paths@.map_values(|p: String| p@) == session_paths(ss@.subrange(0, i as int)),
            decreases ss@.len() - i,
        {
            proof {
                assert(ss@.subrange(0, i + 1).drop_last() =~= ss@.subrange(0, i as int));
            }
            let ghost before = paths@;
            if let Some(p) = &ss[i].file_path {
                paths.push(p.clone());
                assert(paths@.map_values(|p: String| p@) =~= before.map_values(|p: String| p@).push(p@));
            }
            i = i + 1;
        }
        assert(ss@.subrange(0, ss@.len() as int) =~= ss@);
        paths
    }

    fn exit_prompt_action(&mut self, action: ModalAction) -> (work: ModalWork)
        requires
            action is ExitKeepingDownloads || action is ExitCancellingDownloads || action is DeclineExit,
        ensures
            download_prompt_effect(*old(self), *final(self), action, work),
    {
        match action {
            ModalAction::ExitKeepingDownloads => {
                let sessions = self.collect_interrupt_sessions_from_active();
                let keys = self.tracked_keys(&sessions);
                let ghost a0 = *self;
                let mut i: usize = 0;
                while i < sessions.len()
                    invariant
                        i <= sessions@.len(),
                        self.download_history@ == pause_state(a0.download_history@, a0.selected_history_index as int, sessions@, i as int).0,
                        self.selected_history_index == pause_state(a0.download_history@, a0.selected_history_index as int, sessions@, i as int).1,
                        *self == (App {
                            download_history: self.download_history,
                            selected_history_index: self.selected_history_index,
                            ..a0
                        }),
                    decreases sessions@.len() - i,
                {
                    self.record_interrupted_session_to_history(&sessions[i]);
                    i = i + 1;
                }
                self.interrupted_download_sessions = sessions;
                self.show_exit_confirm_modal = false;
                ModalWork::PauseAndQuit(keys)
            },
            ModalAction::ExitCancellingDownloads => {
                let sessions = self.collect_interrupt_sessions_from_active();
                let keys = self.tracked_keys(&sessions);
                let paths = App::file_paths(&sessions);
                self.remove_history_of_sessions(&sessions);
                self.interrupted_download_sessions = Vec::new();
                self.show_exit_confirm_modal = false;
                ModalWork::CancelAndQuit(keys, paths)
            },
            _ => {
                self.show_exit_confirm_modal = false;
                ModalWork::Nothing
            },
        }
    }
}


/// What a key does while a window is open: the exit prompt's save or delete
/// ends the key loop, every other key is consumed; the state changes as the
/// window's effect says, and windows other than the template window leave it
/// as it was.
pub open spec fn modal_effect<M, I>(
    a: App,
    b: App,
    ta: SearchTemplates<M, I>,
    tb: SearchTemplates<M, I>,
    action: ModalAction,
    outcome: ModalKeyOutcome,
    work: ModalWork,
) -> bool {
    &&& outcome == if action is ExitKeepingDownloads || action is ExitCancellingDownloads {
        ModalKeyOutcome::Break
    } else {
        ModalKeyOutcome::Consumed
    }
    &&& if screen_action(action) {
        screen_effect(a, b, action, work) && tb == ta
    } else if template_action(action) {
        template_effect(a, b, ta, tb, action, work)
    } else {
        download_prompt_effect(a, b, action, work) && tb == ta
    }
}

impl App {
    /// Handles a key while a window is open over the tabs: the first open
    /// window takes it (see `modal_action`), and what outside work remains is
    /// handed back. None, with nothing changed, when no window is open.
    pub fn handle_modal_key<M, I>(&mut self, templates: &mut SearchTemplates<M, I>, key: KeyPress) -> (r: Option<(ModalKeyOutcome, ModalWork)>)
        requires
            template_selection_ok(*old(templates)),
        ensures
            match modal_action(*old(self), old(templates).show_search_template_modal, old(templates).search_template_name_editing, key) {
                None => r is None && *final(self) == *old(self) && *final(templates) == *old(templates),
                Some(action) => r matches Some((outcome, work)) && modal_effect(
                    *old(self),
                    *final(self),
                    *old(templates),
                    *final(templates),
                    action,
                    outcome,
                    work,
                ),
            },
            template_selection_ok(*final(templates)),
    {
        let action = match self.modal_key_action(
            templates.show_search_template_modal,
            templates.search_template_name_editing,
            key,
        ) {
            Some(a) => a,
            None => return None,
        };
        match action {
            ModalAction::ExitKeepingDownloads | ModalAction::ExitCancellingDownloads => {
                let work = self.exit_prompt_action(action);
                Some((ModalKeyOutcome::Break, work))
            },
            ModalAction::DeclineExit => {
                let work = self.exit_prompt_action(action);
                Some((ModalKeyOutcome::Consumed, work))
            },
            ModalAction::ResumeSessions | ModalAction::DeleteSessions | ModalAction::DeclineResume => {
                let work = self.resume_prompt_action(action);
                Some((ModalKeyOutcome::Consumed, work))
            },
            ModalAction::CancelTemplateName | ModalAction::SaveTemplateName
            | ModalAction::PopTemplateName | ModalAction::PushTemplateName(_) => {
                let work = self.edit_template_name(templates, action);
                Some((ModalKeyOutcome::Consumed, work))
            },
            ModalAction::CloseTemplates | ModalAction::NextTemplate | ModalAction::PreviousTemplate
            | ModalAction::LoadTemplate | ModalAction::BeginTemplateSave
            | ModalAction::DeleteTemplate => {
                let work = self.browse_templates(templates, action);
                Some((ModalKeyOutcome::Consumed, work))
            },
            ModalAction::CloseStatusHistory | ModalAction::FilterHistory(_)
            | ModalAction::HistoryNext | ModalAction::HistoryPrevious | ModalAction::HistoryFirst
            | ModalAction::HistoryLast | ModalAction::CopyHistoryEntry => {
                let work = self.perform_history_action(action);
                Some((ModalKeyOutcome::Consumed, work))
            },
            _ => {
                let work = self.perform_window_action(action);
                Some((ModalKeyOutcome::Consumed, work))
            },
        }
    }

    /// A partial file could not be deleted: the error is remembered and the
    /// status window opened.
    pub fn note_file_delete_failure(&mut self, error: &str)
        ensures
            final(self).last_error matches Some(e) && e@ == "Failed to delete file: "@ + error@,
            final(self).show_status_modal,
            *final(self) == (App {
                last_error: final(self).last_error,
                show_status_modal: true,
                ..*old(self)
            }),
    {
        let mut text = String::new();
        text.append("Failed to delete file: ");
        text.append(error);
        self.last_error = Some(text);
        self.show_status_modal = true;
    }

    /// A list was saved to disk, or failed to be: the error is remembered, or
    /// forgotten on success.
    pub fn record_save_outcome(&mut self, error: Option<&str>)
        ensures
            match error {
                Some(e) => final(self).last_error matches Some(x) && x@ == e@,
                None => final(self).last_error is None,
            },
            *final(self) == (App { last_error: final(self).last_error, ..*old(self) }),
    {
        self.last_error = match error {
            Some(e) => Some(e.to_owned()),
            None => None,
        };
    }
}


/// The tab keys are held back: a window is open, a search form or a path
/// prompt takes the keys, or the settings are being edited.
pub open spec fn tabs_locked(a: App, templates_open: bool) -> bool {
    ||| a.show_status_modal
    ||| a.show_status_history_modal
    ||| a.show_help_modal
    ||| a.show_image_prompt_modal
    ||| a.show_image_tags_modal
    ||| a.show_image_model_detail_modal
    ||| a.show_like_confirm_modal
    ||| templates_open
    ||| a.show_exit_confirm_modal
    ||| a.show_resume_download_modal
    ||| a.mode != AppMode::Browsing
    ||| (a.active_tab == MainTab::Settings && a.settings_form.editing)
}

/// The tab after another, wrapping round.
pub open spec fn next_tab(t: MainTab) -> MainTab {
    match t {
        MainTab::Models => MainTab::SavedModels,
        MainTab::SavedModels => MainTab::Images,
        MainTab::Images => MainTab::SavedImages,
        MainTab::SavedImages => MainTab::Downloads,
        MainTab::Downloads => MainTab::Settings,
        MainTab::Settings => MainTab::Models,
    }
}

/// The tab before another, wrapping round.
pub open spec fn previous_tab(t: MainTab) -> MainTab {
    match t {
        MainTab::Models => MainTab::Settings,
        MainTab::SavedModels => MainTab::Models,
        MainTab::Images => MainTab::SavedModels,
        MainTab::SavedImages => MainTab::Images,
        MainTab::Downloads => MainTab::SavedImages,
        MainTab::Settings => MainTab::Downloads,
    }
}

/// The tab a key switches to: `1` to `6` name the tabs in order, Tab and
/// Shift-Tab step forward and back.
pub open spec fn tab_for_key(code: KeyCode, current: MainTab) -> Option<MainTab> {
    if is_char(code, '1') {
        Some(MainTab::Models)
    } else if is_char(code, '2') {
        Some(MainTab::SavedModels)
    } else if is_char(code, '3') {
        Some(MainTab::Images)
    } else if is_char(code, '4') {
        Some(MainTab::SavedImages)
    } else if is_char(code, '5') {
        Some(MainTab::Downloads)
    } else if is_char(code, '6') {
        Some(MainTab::Settings)
    } else if code == KeyCode::Tab {
        Some(next_tab(current))
    } else if code == KeyCode::BackTab {
        Some(previous_tab(current))
    } else {
        None
    }
}

/// A switch between tabs, for the caller to load what the new tab shows.
#[derive(Clone, Copy, Debug, PartialEq, Eq, Structural)]
pub struct TabSwitch {
    pub from: MainTab,
    pub to: MainTab,
}

fn step_tab(t: MainTab, forward: bool) -> (r: MainTab)
    ensures
        r == if forward {
            next_tab(t)
        } else {
            previous_tab(t)
        },
{
    if forward {
        match t {
            MainTab::Models => MainTab::SavedModels,
            MainTab::SavedModels => MainTab::Images,
            MainTab::Images => MainTab::SavedImages,
            MainTab::SavedImages => MainTab::Downloads,
            MainTab::Downloads => MainTab::Settings,
            MainTab::Settings => MainTab::Models,
        }
    } else {
        match t {
            MainTab::Models => MainTab::Settings,
            MainTab::SavedModels => MainTab::Models,
            MainTab::Images => MainTab::SavedModels,
            MainTab::SavedImages => MainTab::Images,
            MainTab::Downloads => MainTab::SavedImages,
            MainTab::Settings => MainTab::Downloads,
        }
    }
}

impl App {
    /// Switches tabs on a tab key unless tab keys are held back; the caller
    /// says whether the template window is open, and loads what the new tab
    /// shows. None, with nothing changed, when the key does not switch.
    pub fn handle_tab_switch_key(&mut self, templates_open: bool, code: KeyCode) -> (r: Option<TabSwitch>)
        ensures
            if !tabs_locked(*old(self), templates_open) && tab_for_key(code, old(self).active_tab) is Some {
                let to = tab_for_key(code, old(self).active_tab).unwrap();
                &&& r == Some(TabSwitch { from: old(self).active_tab, to })
                &&& *final(self) == (App { active_tab: to, mode: AppMode::Browsing, ..*old(self) })
            } else {
                r is None && *final(self) == *old(self)
            },
    {
        if self.show_status_modal || self.show_status_history_modal || self.show_help_modal
            || self.show_image_prompt_modal || self.show_image_tags_modal
            || self.show_image_model_detail_modal || self.show_like_confirm_modal || templates_open
            || self.show_exit_confirm_modal || self.show_resume_download_modal || self.mode
            != AppMode::Browsing || (self.active_tab == MainTab::Settings
            && self.settings_form.editing) {
            return None;
        }
        let to = if char_is(code, '1') {
            MainTab::Models
        } else if char_is(code, '2') {
            MainTab::SavedModels
        } else if char_is(code, '3') {
            MainTab::Images
        } else if char_is(code, '4') {
            MainTab::SavedImages
        } else if char_is(code, '5') {
            MainTab::Downloads
        } else if char_is(code, '6') {
            MainTab::Settings
        } else if code == KeyCode::Tab {
            step_tab(self.active_tab, true)
        } else if code == KeyCode::BackTab {
            step_tab(self.active_tab, false)
        } else {
            return None;
        };
        let from = self.active_tab;
        self.active_tab = to;
        self.mode = AppMode::Browsing;
        Some(TabSwitch { from, to })
    }
}


/// Tab and Shift-Tab undo each other, and six steps either way come back to
/// the tab they started from.
pub proof fn law_tab_steps_undo(t: MainTab)
    ensures
        previous_tab(next_tab(t)) == t,
        next_tab(previous_tab(t)) == t,
        next_tab(next_tab(next_tab(next_tab(next_tab(next_tab(t)))))) == t,
        previous_tab(previous_tab(previous_tab(previous_tab(previous_tab(previous_tab(t)))))) == t,
{
}

/// While a window is open, every key is taken by it and never reaches the
/// tabs.
pub proof fn law_open_window_takes_keys(a: App, templates_open: bool, templates_editing: bool, key: KeyPress)
    requires
        modal_action(a, templates_open, templates_editing, key) is Some,
    ensures
        tabs_locked(a, templates_open),
{
}

/// Tab moves to the tab whose number key is one higher, from `6` back to `1`,
/// and Shift-Tab to the one whose number key is one lower, from `1` back to
/// `6`; the number keys `1` to `6` name the tabs in the order of the tab bar,
/// whose titles show each tab's number.
pub proof fn law_tab_follows_number_keys(t: MainTab, digit: char)
    requires
        '1' <= digit <= '6',
    ensures
        tab_for_key(KeyCode::Char(digit), t) matches Some(u) && tab_index(u) == digit as int - '1' as int
            && tab_titles_text()[tab_index(u) as int][tab_titles_text()[tab_index(u) as int].len() - 3] == digit,
        tab_index(next_tab(t)) == (tab_index(t) + 1) % 6,
        tab_index(previous_tab(t)) == (tab_index(t) + 5) % 6,
        tab_for_key(KeyCode::Tab, t) == Some(next_tab(t)),
        tab_for_key(KeyCode::BackTab, t) == Some(previous_tab(t)),
{
    reveal_strlit(" Models (1) ");
    reveal_strlit(" Bookmarks (2) ");
    reveal_strlit(" Image Feed (3) ");
    reveal_strlit(" Image Bookmarks (4) ");
    reveal_strlit(" Downloads (5) ");
    reveal_strlit(" Settings (6) ");
}

/// In the status history, `0` shows every entry and `1` to `4` show only the
/// info, warning, debug and error entries, in that order.
pub proof fn law_history_keys_pick_levels(level: StatusLevel)
    ensures
        history_window_action(KeyCode::Char('0')) matches ModalAction::FilterHistory(f) && filter_admits(f, level),
        history_window_action(KeyCode::Char('1')) matches ModalAction::FilterHistory(f) && (filter_admits(f, level)
            <==> level == StatusLevel::Info),
        history_window_action(KeyCode::Char('2')) matches ModalAction::FilterHistory(f) && (filter_admits(f, level)
            <==> level == StatusLevel::Warn),
        history_window_action(KeyCode::Char('3')) matches ModalAction::FilterHistory(f) && (filter_admits(f, level)
            <==> level == StatusLevel::Debug),
        history_window_action(KeyCode::Char('4')) matches ModalAction::FilterHistory(f) && (filter_admits(f, level)
            <==> level == StatusLevel::Error),
{
}

} // verus!
